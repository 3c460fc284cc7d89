//! The scene walk that collects what a frame draws, and the painter's order
//! it is drawn in.
//!
//! The scene reaches the walk flattened: one [`SceneEntry`] per object, each
//! after its parent, in the order a depth-first walk of the tree meets them.
//! What the walk reads of an object is held as plain values: its flags, its
//! layer mask, and, for a drawable, what the frustum test said and where its
//! depth ranks. Orders and depths are integer keys that rank as the
//! renderer's own values do.

use vstd::prelude::*;

use crate::batched::{depth_order, depth_sorted_before, is_order};

verus! {

/// What the walk knows of a drawable object (a mesh, a line or points).
#[derive(Clone, Copy, Debug, PartialEq, Eq, Structural)]
pub struct Drawable {
    /// Whether the object has a geometry to draw.
    pub has_geometry: bool,
    /// `object.frustumCulled`: whether the frustum test applies to it.
    pub frustum_culled: bool,
    /// Whether its bounding sphere meets the camera's frustum (false for a
    /// geometry without positions, which has no bounding sphere).
    pub in_frustum: bool,
    /// `material.visible`; true for an object that has no material of its
    /// own, which the scene's override material draws.
    pub material_visible: bool,
    /// `material.transparent`: which of the two lists it joins.
    pub transparent: bool,
    /// Where the clip-space depth of its bounding sphere's centre ranks.
    pub depth: i64,
}

/// What an object is, as far as the walk cares.
#[derive(Clone, Copy, Debug, PartialEq, Eq, Structural)]
pub enum Role {
    /// A group: its render order becomes the group order of what lies below.
    Group,
    /// A light: collected into the light list, never drawn.
    Light,
    /// Something drawn.
    Drawable(Drawable),
    /// Anything else (the scene itself, a bone, a camera).
    Other,
}

/// One object of the scene.
#[derive(Clone, Copy, Debug, PartialEq, Eq, Structural)]
pub struct SceneEntry {
    /// The position of its parent among the entries; `None` at a root.
    pub parent: Option<usize>,
    /// `object.id`, the last tie-break of the painter's order.
    pub id: u32,
    /// `object.visible`: a hidden object hides everything below it.
    pub visible: bool,
    /// `object.castShadow`: whether a shadow pass draws it.
    pub cast_shadow: bool,
    /// `object.layers`, as a mask.
    pub layers: u32,
    /// Where `object.renderOrder` ranks.
    pub render_order: i64,
    /// What the object is.
    pub role: Role,
}

/// What the walk reads of the camera: the layers it sees.
#[derive(Clone, Copy, Debug, PartialEq, Eq, Structural)]
pub struct ProjectCamera {
    /// `camera.layers`, as a mask.
    pub layers: u32,
}

/// One entry of a draw list.
#[derive(Clone, Copy, Debug, PartialEq, Eq, Structural)]
pub struct RenderItem {
    /// The position of the object among the scene's entries.
    pub node: usize,
    /// `object.id`.
    pub id: u32,
    /// The render order of the nearest group above it that the camera sees.
    pub group_order: i64,
    /// The object's own render order.
    pub render_order: i64,
    /// Its depth key; 0 when objects are not sorted.
    pub depth: i64,
}

/// The lists a walk fills: the opaque and transparent draws and the lights,
/// each in the order the walk met them until sorted.
pub struct RenderList {
    /// The opaque draws.
    pub opaque: Vec<RenderItem>,
    /// The transparent draws.
    pub transparent: Vec<RenderItem>,
    /// The lights, by position among the scene's entries.
    pub lights: Vec<usize>,
}

/// Each entry comes after its parent.
pub open spec fn parents_first(nodes: Seq<SceneEntry>) -> bool {
    forall|i: int| 0 <= i < nodes.len() ==> match (#[trigger] nodes[i]).parent {
        Some(p) => p < i,
        None => true,
    }
}

/// Whether an object on `layers` is seen by a camera on `camera`: they share
/// a layer.
pub open spec fn layers_meet(layers: u32, camera: u32) -> bool {
    (layers & camera) != 0
}

/// Whether the walk reaches entry `i`: it and everything above it are
/// visible.
pub open spec fn shown(nodes: Seq<SceneEntry>, i: int) -> bool
    decreases i,
{
    if 0 <= i < nodes.len() {
        nodes[i].visible && match nodes[i].parent {
            Some(p) => if p < i {
                shown(nodes, p as int)
            } else {
                true
            },
            None => true,
        }
    } else {
        false
    }
}

/// The group order that entry `i` hands to the entries below it: its own
/// render order when it is a group the camera sees, else the one it was
/// given.
pub open spec fn order_below(nodes: Seq<SceneEntry>, camera: ProjectCamera, root: i64, i: int) -> i64
    decreases i,
{
    if 0 <= i < nodes.len() {
        if nodes[i].role is Group && layers_meet(nodes[i].layers, camera.layers) {
            nodes[i].render_order
        } else {
            match nodes[i].parent {
                Some(p) => if p < i {
                    order_below(nodes, camera, root, p as int)
                } else {
                    root
                },
                None => root,
            }
        }
    } else {
        root
    }
}

/// The group order entry `i` is given: its parent's, or `root` at a root.
pub open spec fn order_given(nodes: Seq<SceneEntry>, camera: ProjectCamera, root: i64, i: int) -> i64 {
    match nodes[i].parent {
        Some(p) => if p < i {
            order_below(nodes, camera, root, p as int)
        } else {
            root
        },
        None => root,
    }
}

/// Whether the walk looks at entry `i` itself: it is reached and the camera
/// sees its layers.
pub open spec fn seen(nodes: Seq<SceneEntry>, camera: ProjectCamera, i: int) -> bool {
    shown(nodes, i) && layers_meet(nodes[i].layers, camera.layers)
}

/// Whether a drawable is drawn once it is seen: it has a geometry, passes
/// the frustum test when that applies, and its material is visible.
pub open spec fn drawable_passes(d: Drawable) -> bool {
    d.has_geometry && (!d.frustum_culled || d.in_frustum) && d.material_visible
}

/// Whether entry `i` joins a draw list.
pub open spec fn pushed(nodes: Seq<SceneEntry>, camera: ProjectCamera, i: int) -> bool {
    seen(nodes, camera, i) && match nodes[i].role {
        Role::Drawable(d) => drawable_passes(d),
        _ => false,
    }
}

/// Whether entry `i` joins the light list.
pub open spec fn lit(nodes: Seq<SceneEntry>, camera: ProjectCamera, i: int) -> bool {
    seen(nodes, camera, i) && nodes[i].role is Light
}

/// Whether entry `i` is transparent.
pub open spec fn is_transparent(entry: SceneEntry) -> bool {
    match entry.role {
        Role::Drawable(d) => d.transparent,
        _ => false,
    }
}

/// The draw-list entry of entry `i`.
pub open spec fn item_of(nodes: Seq<SceneEntry>, camera: ProjectCamera, root: i64, sort: bool, i: int) -> RenderItem {
    RenderItem {
        node: i as usize,
        id: nodes[i].id,
        group_order: order_given(nodes, camera, root, i),
        render_order: nodes[i].render_order,
        depth: match nodes[i].role {
            Role::Drawable(d) => if sort {
                d.depth
            } else {
                0
            },
            _ => 0,
        },
    }
}

/// The draws of the first `n` entries that join the list of the given
/// transparency, in order.
pub open spec fn drawn_upto(
    nodes: Seq<SceneEntry>,
    camera: ProjectCamera,
    root: i64,
    sort: bool,
    transparent: bool,
    n: int,
) -> Seq<RenderItem>
    decreases n,
{
    if n <= 0 {
        Seq::empty()
    } else {
        let rest = drawn_upto(nodes, camera, root, sort, transparent, n - 1);
        if pushed(nodes, camera, n - 1) && is_transparent(nodes[n - 1]) == transparent {
            rest.push(item_of(nodes, camera, root, sort, n - 1))
        } else {
            rest
        }
    }
}

/// The lights among the first `n` entries, in order.
pub open spec fn lights_upto(nodes: Seq<SceneEntry>, camera: ProjectCamera, n: int) -> Seq<usize>
    decreases n,
{
    if n <= 0 {
        Seq::empty()
    } else {
        let rest = lights_upto(nodes, camera, n - 1);
        if lit(nodes, camera, n - 1) {
            rest.push((n - 1) as usize)
        } else {
            rest
        }
    }
}

/// Whether `a`'s depth ranks strictly before `b`'s: nearer first, or, with
/// `reversed`, farther first.
pub open spec fn depth_before(a: RenderItem, b: RenderItem, reversed: bool) -> bool {
    if reversed {
        a.depth > b.depth
    } else {
        a.depth < b.depth
    }
}

/// Whether the painter's order draws `a` strictly before `b`: by group
/// order, then render order, then depth (farther first with `reversed`),
/// then id.
pub open spec fn painter_before(a: RenderItem, b: RenderItem, reversed: bool) -> bool {
    ||| a.group_order < b.group_order
    ||| a.group_order == b.group_order && a.render_order < b.render_order
    ||| a.group_order == b.group_order && a.render_order == b.render_order && depth_before(a, b, reversed)
    ||| a.group_order == b.group_order && a.render_order == b.render_order && a.depth == b.depth && a.id < b.id
}

/// Whether the painter's order ties `a` and `b`.
pub open spec fn painter_tied(a: RenderItem, b: RenderItem) -> bool {
    a.group_order == b.group_order && a.render_order == b.render_order && a.depth == b.depth && a.id == b.id
}

/// Whether no item of `items` comes after one the painter's order draws
/// later.
pub open spec fn painter_sorted(items: Seq<RenderItem>, reversed: bool) -> bool {
    forall|i: int, j: int| 0 <= i < j < items.len() ==> !painter_before(#[trigger] items[j], #[trigger] items[i], reversed)
}

/// Whether `arranged` is `items` rearranged, entry `k` being `items[from[k]]`,
/// with tied items kept in the order they had.
pub open spec fn stable_arrangement(items: Seq<RenderItem>, arranged: Seq<RenderItem>, from: Seq<int>) -> bool {
    &&& arranged.len() == items.len()
    &&& from.len() == items.len()
    &&& forall|k: int| 0 <= k < from.len() ==> 0 <= #[trigger] from[k] < items.len() && arranged[k] == items[from[k]]
    &&& forall|k1: int, k2: int| 0 <= k1 < k2 < from.len() ==> #[trigger] from[k1] != #[trigger] from[k2]
    &&& forall|k1: int, k2: int|
        0 <= k1 < k2 < from.len() && painter_tied(#[trigger] arranged[k1], #[trigger] arranged[k2]) ==> from[k1] < from[k2]
}

/// Whether the painter's order draws `a` strictly before `b`.
fn drawn_before(a: &RenderItem, b: &RenderItem, reversed: bool) -> (before: bool)
    ensures
        before == painter_before(*a, *b, reversed),
{
    if a.group_order != b.group_order {
        return a.group_order < b.group_order;
    }
    if a.render_order != b.render_order {
        return a.render_order < b.render_order;
    }
    if a.depth != b.depth {
        return if reversed {
            a.depth > b.depth
        } else {
            a.depth < b.depth
        };
    }
    a.id < b.id
}

/// `items` in the painter's order, stably: tied items keep their order.
fn painter_sort(items: &Vec<RenderItem>, reversed: bool) -> (sorted: Vec<RenderItem>)
    ensures
        painter_sorted(sorted@, reversed),
        exists|from: Seq<int>| stable_arrangement(items@, sorted@, from),
{
    let mut sorted: Vec<RenderItem> = Vec::new();
    let ghost mut from: Seq<int> = Seq::empty();
    let mut i: usize = 0;
    while i < items.len()
        invariant
            i <= items@.len(),
            painter_sorted(sorted@, reversed),
            stable_arrangement(items@.take(i as int), sorted@, from),
        decreases items@.len() - i,
    {
        let x = items[i];
        let mut pos: usize = sorted.len();
        while pos > 0 && drawn_before(&x, &sorted[pos - 1], reversed)
            invariant
                pos <= sorted@.len(),
                forall|k: int| pos <= k < sorted@.len() ==> painter_before(x, #[trigger] sorted@[k], reversed),
            decreases pos,
        {
            pos = pos - 1;
        }
        proof {
            let ghost old_sorted = sorted@;
            assert forall|k: int| 0 <= k < pos implies !painter_before(x, #[trigger] old_sorted[k], reversed) by {
                if k < pos - 1 {
                    assert(!painter_before(old_sorted[pos - 1], old_sorted[k], reversed));
                }
            }
        }
        let ghost old_sorted = sorted@;
        let ghost old_from = from;
        sorted.insert(pos, x);
        proof {
            from = old_from.insert(pos as int, i as int);
            let ghost s = sorted@;
            let ghost p = pos as int;
            let ghost taken = items@.take(i as int + 1);
            assert(s =~= old_sorted.insert(p, x));
            assert forall|k: int| 0 <= k < s.len() implies (k < p ==> s[k] == old_sorted[k]) && (k == p ==> s[k] == x) && (k > p ==> s[k] == old_sorted[k - 1]) by {
                old_sorted.insert_ensures(p, x);
                if k > p {
                    assert(s[(k - 1) + 1] == old_sorted[k - 1]);
                }
            }
            assert forall|k: int| 0 <= k < from.len() implies (k < p ==> from[k] == old_from[k]) && (k == p ==> from[k] == i) && (k > p ==> from[k] == old_from[k - 1]) by {
                old_from.insert_ensures(p, i as int);
                if k > p {
                    assert(from[(k - 1) + 1] == old_from[k - 1]);
                }
            }
            assert forall|a: int, b: int| 0 <= a < b < s.len() implies !painter_before(#[trigger] s[b], #[trigger] s[a], reversed) by {
                if b < p {
                    assert(!painter_before(old_sorted[b], old_sorted[a], reversed));
                } else if b == p {
                    assert(!painter_before(x, old_sorted[a], reversed));
                } else if a < p {
                    assert(!painter_before(old_sorted[b - 1], old_sorted[a], reversed));
                } else if a == p {
                    assert(painter_before(x, old_sorted[b - 1], reversed));
                } else {
                    assert(!painter_before(old_sorted[b - 1], old_sorted[a - 1], reversed));
                }
            }
            assert forall|k: int| 0 <= k < from.len() implies 0 <= #[trigger] from[k] < taken.len() && s[k] == taken[from[k]] by {
                if k < p {
                    assert(0 <= old_from[k] < i);
                } else if k > p {
                    assert(0 <= old_from[k - 1] < i);
                }
            }
            assert forall|a: int, b: int| 0 <= a < b < from.len() implies #[trigger] from[a] != #[trigger] from[b] by {
                if a != p && b != p {
                    let a0 = if a < p { a } else { a - 1 };
                    let b0 = if b < p { b } else { b - 1 };
                    assert(old_from[a0] != old_from[b0]);
                } else if a == p {
                    assert(0 <= old_from[b - 1] < i);
                } else {
                    assert(0 <= old_from[a] < i);
                }
            }
            assert forall|a: int, b: int|
                0 <= a < b < from.len() && painter_tied(#[trigger] s[a], #[trigger] s[b]) implies from[a] < from[b] by {
                if b < p {
                    assert(painter_tied(old_sorted[a], old_sorted[b]));
                } else if b == p {
                    assert(0 <= old_from[a] < i);
                } else if a == p {
                    assert(painter_before(x, old_sorted[b - 1], reversed));
                } else if a < p {
                    assert(painter_tied(old_sorted[a], old_sorted[b - 1]));
                } else {
                    assert(painter_tied(old_sorted[a - 1], old_sorted[b - 1]));
                }
            }
            assert(stable_arrangement(taken, s, from));
        }
        i = i + 1;
    }
    proof {
        assert(items@.take(items@.len() as int) =~= items@);
    }
    sorted
}

/// Whether entry `a` lies above entry `j`: it is `j`'s parent, or lies above
/// that.
pub open spec fn lies_above(nodes: Seq<SceneEntry>, a: int, j: int) -> bool
    decreases j,
{
    if 0 <= j < nodes.len() {
        match nodes[j].parent {
            Some(p) => if p < j {
                p == a || lies_above(nodes, a, p as int)
            } else {
                false
            },
            None => false,
        }
    } else {
        false
    }
}

/// A hidden object hides everything below it: nothing under it is drawn or
/// lit, however its own flags are set.
pub proof fn a_hidden_object_hides_everything_below_it(nodes: Seq<SceneEntry>, camera: ProjectCamera, a: int, j: int)
    requires
        parents_first(nodes),
        0 <= a < nodes.len(),
        !nodes[a].visible,
        lies_above(nodes, a, j),
    ensures
        !shown(nodes, j),
        !pushed(nodes, camera, j),
        !lit(nodes, camera, j),
    decreases j,
{
    let p = nodes[j].parent.unwrap() as int;
    if p != a {
        a_hidden_object_hides_everything_below_it(nodes, camera, a, p);
    }
    assert(!shown(nodes, p));
}

/// A layer the camera does not see skips the object itself and nothing
/// below it: a child the camera sees is still drawn.
pub proof fn a_layers_miss_skips_only_the_object(nodes: Seq<SceneEntry>, camera: ProjectCamera, p: int, c: int)
    requires
        parents_first(nodes),
        0 <= p < c < nodes.len(),
        nodes[c].parent matches Some(q) && q == p,
        shown(nodes, p),
        !layers_meet(nodes[p].layers, camera.layers),
        nodes[c].visible,
        layers_meet(nodes[c].layers, camera.layers),
        nodes[c].role matches Role::Drawable(d) && drawable_passes(d),
    ensures
        !pushed(nodes, camera, p),
        !lit(nodes, camera, p),
        pushed(nodes, camera, c),
{
}

/// A light is collected and never drawn, and what lies below it is walked
/// as below any other visible object.
pub proof fn lights_are_collected_not_drawn(nodes: Seq<SceneEntry>, camera: ProjectCamera, l: int, c: int)
    requires
        parents_first(nodes),
        0 <= l < c < nodes.len(),
        nodes[l].role is Light,
        nodes[c].parent matches Some(q) && q == l,
    ensures
        !pushed(nodes, camera, l),
        lit(nodes, camera, l) == seen(nodes, camera, l),
        shown(nodes, c) == (nodes[c].visible && shown(nodes, l)),
{
}

/// The group order an object is given is the render order of the nearest
/// group above it that the camera sees, or the walk's own where there is
/// none: a parent that is such a group gives its render order, any other
/// parent passes on what it was given.
pub proof fn the_group_order_comes_from_the_nearest_seen_group(
    nodes: Seq<SceneEntry>,
    camera: ProjectCamera,
    root: i64,
    p: int,
    c: int,
)
    requires
        parents_first(nodes),
        0 <= p < c < nodes.len(),
        nodes[c].parent matches Some(q) && q == p,
    ensures
        nodes[p].role is Group && layers_meet(nodes[p].layers, camera.layers) ==> order_given(nodes, camera, root, c)
            == nodes[p].render_order,
        !(nodes[p].role is Group && layers_meet(nodes[p].layers, camera.layers)) ==> order_given(nodes, camera, root, c)
            == order_given(nodes, camera, root, p),
{
}

/// A walk lists each object at most once, in the order the walk meets
/// them, and only objects that pass every gate, each with its own entry.
pub proof fn a_walk_lists_each_drawn_object_once(
    nodes: Seq<SceneEntry>,
    camera: ProjectCamera,
    root: i64,
    sort: bool,
    transparent: bool,
    n: int,
)
    requires
        parents_first(nodes),
        0 <= n <= nodes.len(),
        nodes.len() <= usize::MAX,
    ensures
        forall|a: int, b: int|
            0 <= a < b < drawn_upto(nodes, camera, root, sort, transparent, n).len() ==> (#[trigger] drawn_upto(
                nodes,
                camera,
                root,
                sort,
                transparent,
                n,
            )[a]).node < (#[trigger] drawn_upto(nodes, camera, root, sort, transparent, n)[b]).node,
        forall|k: int|
            0 <= k < drawn_upto(nodes, camera, root, sort, transparent, n).len() ==> {
                let item = #[trigger] drawn_upto(nodes, camera, root, sort, transparent, n)[k];
                &&& 0 <= item.node < n
                &&& pushed(nodes, camera, item.node as int)
                &&& is_transparent(nodes[item.node as int]) == transparent
                &&& item == item_of(nodes, camera, root, sort, item.node as int)
            },
    decreases n,
{
    if n > 0 {
        a_walk_lists_each_drawn_object_once(nodes, camera, root, sort, transparent, n - 1);
        let rest = drawn_upto(nodes, camera, root, sort, transparent, n - 1);
        let all = drawn_upto(nodes, camera, root, sort, transparent, n);
        if pushed(nodes, camera, n - 1) && is_transparent(nodes[n - 1]) == transparent {
            let last = item_of(nodes, camera, root, sort, n - 1);
            assert(all == rest.push(last));
            assert(last.node == n - 1);
            assert forall|a: int, b: int| 0 <= a < b < all.len() implies (#[trigger] all[a]).node < (#[trigger] all[b]).node by {
                assert(all[a] == rest[a]);
                if b < rest.len() {
                    assert(all[b] == rest[b]);
                    assert(rest[a].node < rest[b].node);
                } else {
                    assert(0 <= rest[a].node < n - 1);
                }
            }
            assert forall|k: int| 0 <= k < all.len() implies {
                let item = #[trigger] all[k];
                &&& 0 <= item.node < n
                &&& pushed(nodes, camera, item.node as int)
                &&& is_transparent(nodes[item.node as int]) == transparent
                &&& item == item_of(nodes, camera, root, sort, item.node as int)
            } by {
                if k < rest.len() {
                    assert(all[k] == rest[k]);
                }
            }
        } else {
            assert(all == rest);
        }
    }
}

/// In a list in the painter's order, group order ranks first, then render
/// order, then depth (farther first when reversed), then id.
pub proof fn the_painter_order_ranks_group_then_render_order_then_depth(items: Seq<RenderItem>, reversed: bool, i: int, j: int)
    requires
        painter_sorted(items, reversed),
        0 <= i < j < items.len(),
    ensures
        items[i].group_order <= items[j].group_order,
        items[i].group_order == items[j].group_order ==> items[i].render_order <= items[j].render_order,
        items[i].group_order == items[j].group_order && items[i].render_order == items[j].render_order ==> !depth_before(
            items[j],
            items[i],
            reversed,
        ),
        items[i].group_order == items[j].group_order && items[i].render_order == items[j].render_order
            && items[i].depth == items[j].depth ==> items[i].id <= items[j].id,
{
    assert(!painter_before(items[j], items[i], reversed));
}

/// Whether `sorted` is `lights` rearranged by `order` (entry `k` being
/// light `order[k]`) by object id, lights with one id in their own order.
pub open spec fn lights_sorted_by_id(lights: Seq<usize>, nodes: Seq<SceneEntry>, sorted: Seq<usize>, order: Seq<usize>) -> bool {
    &&& is_order(order, lights.len() as int)
    &&& sorted.len() == lights.len()
    &&& forall|k: int| 0 <= k < sorted.len() ==> #[trigger] sorted[k] == lights[order[k] as int]
    &&& forall|j: int, k: int|
        0 <= j < k < sorted.len() ==> depth_sorted_before(
            Seq::new(lights.len(), |m: int| nodes[lights[m] as int].id as i64),
            #[trigger] order[j] as int,
            #[trigger] order[k] as int,
            false,
        )
}

impl RenderList {
    /// An empty list.
    pub fn new() -> (list: Self)
        ensures
            list.opaque@ == Seq::<RenderItem>::empty(),
            list.transparent@ == Seq::<RenderItem>::empty(),
            list.lights@ == Seq::<usize>::empty(),
    {
        RenderList { opaque: Vec::new(), transparent: Vec::new(), lights: Vec::new() }
    }

    /// How many draws the list holds.
    pub fn len(&self) -> (count: usize)
        requires
            self.opaque@.len() + self.transparent@.len() <= usize::MAX,
        ensures
            count == self.opaque@.len() + self.transparent@.len(),
    {
        self.opaque.len() + self.transparent.len()
    }

    /// Whether the list holds no draw.
    pub fn is_empty(&self) -> (empty: bool)
        ensures
            empty == (self.opaque@.len() == 0 && self.transparent@.len() == 0),
    {
        self.opaque.len() == 0 && self.transparent.len() == 0
    }

    /// Puts both lists in the painter's order, stably: the opaque draws by
    /// group order, render order, nearest first and id; the transparent
    /// ones the same but farthest first. The lights stay as they are.
    pub fn sort(&mut self)
        ensures
            painter_sorted(final(self).opaque@, false),
            exists|from: Seq<int>| stable_arrangement(old(self).opaque@, final(self).opaque@, from),
            painter_sorted(final(self).transparent@, true),
            exists|from: Seq<int>| stable_arrangement(old(self).transparent@, final(self).transparent@, from),
            final(self).lights@ == old(self).lights@,
    {
        self.opaque = painter_sort(&self.opaque, false);
        self.transparent = painter_sort(&self.transparent, true);
    }

    /// The lights in the order their lighting is set up in: by object id
    /// (creation order), not walk order; lights with one id keep their walk
    /// order: entry `k` is light `order[k]` of a rearrangement `order`.
    pub fn lights_by_id(&self, nodes: &[SceneEntry]) -> (lights: Vec<usize>)
        requires
            forall|k: int| 0 <= k < self.lights@.len() ==> (#[trigger] self.lights@[k]) < nodes@.len(),
        ensures
            exists|order: Seq<usize>| lights_sorted_by_id(self.lights@, nodes@, lights@, order),
    {
        let n = self.lights.len();
        let mut ids: Vec<i64> = Vec::new();
        let mut k: usize = 0;
        while k < n
            invariant
                n == self.lights@.len(),
                k <= n,
                forall|m: int| 0 <= m < n ==> (#[trigger] self.lights@[m]) < nodes@.len(),
                ids@ =~= Seq::new(k as nat, |m: int| nodes@[self.lights@[m] as int].id as i64),
            decreases n - k,
        {
            ids.push(nodes[self.lights[k]].id as i64);
            k = k + 1;
        }
        let order = depth_order(&ids, false);
        let mut lights: Vec<usize> = Vec::new();
        let mut k: usize = 0;
        while k < n
            invariant
                n == self.lights@.len(),
                k <= n,
                is_order(order@, n as int),
                lights@.len() == k,
                forall|m: int| 0 <= m < k ==> #[trigger] lights@[m] == self.lights@[order@[m] as int],
            decreases n - k,
        {
            lights.push(self.lights[order[k]]);
            k = k + 1;
        }
        assert(lights_sorted_by_id(self.lights@, nodes@, lights@, order@));
        lights
    }

    /// The draws in the order a frame draws them: the opaque ones, then the
    /// transparent ones.
    pub fn items(&self) -> (items: Vec<RenderItem>)
        ensures
            items@ == self.opaque@ + self.transparent@,
    {
        let mut items: Vec<RenderItem> = self.opaque.clone();
        let mut rest: Vec<RenderItem> = self.transparent.clone();
        items.append(&mut rest);
        items
    }
}

/// The entries among the first `n` of `items` whose objects cast a shadow,
/// in order.
pub open spec fn casters_upto(items: Seq<RenderItem>, nodes: Seq<SceneEntry>, n: int) -> Seq<RenderItem>
    decreases n,
{
    if n <= 0 {
        Seq::empty()
    } else if nodes[items[n - 1].node as int].cast_shadow {
        casters_upto(items, nodes, n - 1).push(items[n - 1])
    } else {
        casters_upto(items, nodes, n - 1)
    }
}

/// What a shadow pass draws of the draws a walk from the light collected:
/// the ones whose objects cast a shadow, in the same order.
pub fn shadow_casters(items: &[RenderItem], nodes: &[SceneEntry]) -> (casters: Vec<RenderItem>)
    requires
        forall|k: int| 0 <= k < items@.len() ==> (#[trigger] items@[k]).node < nodes@.len(),
    ensures
        casters@ == casters_upto(items@, nodes@, items@.len() as int),
{
    let mut casters: Vec<RenderItem> = Vec::new();
    let mut k: usize = 0;
    while k < items.len()
        invariant
            k <= items@.len(),
            forall|j: int| 0 <= j < items@.len() ==> (#[trigger] items@[j]).node < nodes@.len(),
            casters@ == casters_upto(items@, nodes@, k as int),
        decreases items@.len() - k,
    {
        let item = items[k];
        if nodes[item.node].cast_shadow {
            casters.push(item);
        }
        k = k + 1;
    }
    casters
}

/// Walks the scene's entries and appends to `render_list` what a camera on
/// `camera`'s layers draws: a hidden entry hides everything below it; one
/// the camera does not see is skipped itself, but what lies below it is
/// still walked; a light joins the light list; a drawable that passes joins
/// the transparent or the opaque list, with the group order it was given
/// (`group_order` at a root) and its depth key when `sort_objects` is set.
pub fn project_object(
    nodes: &[SceneEntry],
    camera: &ProjectCamera,
    group_order: i64,
    render_list: &mut RenderList,
    sort_objects: bool,
)
    requires
        parents_first(nodes@),
    ensures
        final(render_list).opaque@ == old(render_list).opaque@ + drawn_upto(
            nodes@,
            *camera,
            group_order,
            sort_objects,
            false,
            nodes@.len() as int,
        ),
        final(render_list).transparent@ == old(render_list).transparent@ + drawn_upto(
            nodes@,
            *camera,
            group_order,
            sort_objects,
            true,
            nodes@.len() as int,
        ),
        final(render_list).lights@ == old(render_list).lights@ + lights_upto(nodes@, *camera, nodes@.len() as int),
{
    let mut shown_so_far: Vec<bool> = Vec::new();
    let mut order_so_far: Vec<i64> = Vec::new();
    let mut i: usize = 0;
    while i < nodes.len()
        invariant
            parents_first(nodes@),
            i <= nodes@.len(),
            shown_so_far@.len() == i,
            order_so_far@.len() == i,
            forall|j: int| 0 <= j < i ==> #[trigger] shown_so_far@[j] == shown(nodes@, j),
            forall|j: int| 0 <= j < i ==> #[trigger] order_so_far@[j] == order_below(nodes@, *camera, group_order, j),
            render_list.opaque@ == old(render_list).opaque@ + drawn_upto(
                nodes@,
                *camera,
                group_order,
                sort_objects,
                false,
                i as int,
            ),
            render_list.transparent@ == old(render_list).transparent@ + drawn_upto(
                nodes@,
                *camera,
                group_order,
                sort_objects,
                true,
                i as int,
            ),
            render_list.lights@ == old(render_list).lights@ + lights_upto(nodes@, *camera, i as int),
        decreases nodes@.len() - i,
    {
        let node = nodes[i];
        proof {
            assert(match nodes@[i as int].parent {
                Some(p) => p < i,
                None => true,
            });
        }
        let (parent_shown, given) = match node.parent {
            Some(p) => (shown_so_far[p], order_so_far[p]),
            None => (true, group_order),
        };
        let is_shown = node.visible && parent_shown;
        let meets = (node.layers & camera.layers) != 0;
        let below = match node.role {
            Role::Group => if meets {
                node.render_order
            } else {
                given
            },
            _ => given,
        };
        proof {
            assert(is_shown == shown(nodes@, i as int));
            assert(below == order_below(nodes@, *camera, group_order, i as int));
            assert(given == order_given(nodes@, *camera, group_order, i as int));
        }
        if is_shown && meets {
            match node.role {
                Role::Light => {
                    render_list.lights.push(i);
                },
                Role::Drawable(d) => {
                    if d.has_geometry && (!d.frustum_culled || d.in_frustum) && d.material_visible {
                        let item = RenderItem {
                            node: i,
                            id: node.id,
                            group_order: given,
                            render_order: node.render_order,
                            depth: if sort_objects {
                                d.depth
                            } else {
                                0
                            },
                        };
                        if d.transparent {
                            render_list.transparent.push(item);
                        } else {
                            render_list.opaque.push(item);
                        }
                    }
                },
                _ => {},
            }
        }
        shown_so_far.push(is_shown);
        order_so_far.push(below);
        i = i + 1;
        proof {
            assert(render_list.opaque@ =~= old(render_list).opaque@ + drawn_upto(
                nodes@,
                *camera,
                group_order,
                sort_objects,
                false,
                i as int,
            ));
            assert(render_list.transparent@ =~= old(render_list).transparent@ + drawn_upto(
                nodes@,
                *camera,
                group_order,
                sort_objects,
                true,
                i as int,
            ));
            assert(render_list.lights@ =~= old(render_list).lights@ + lights_upto(nodes@, *camera, i as int));
        }
    }
}

} // verus!
