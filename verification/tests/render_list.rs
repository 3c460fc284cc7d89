use three_rs::render_list::{project_object, Drawable, ProjectCamera, RenderItem, RenderList, Role, SceneEntry};

const CAMERA: ProjectCamera = ProjectCamera { layers: 1 };

fn object(parent: Option<usize>, id: u32, role: Role) -> SceneEntry {
    SceneEntry { parent, id, visible: true, cast_shadow: false, layers: 1, render_order: 0, role }
}

fn scene() -> SceneEntry {
    object(None, 0, Role::Other)
}

fn group(parent: usize, id: u32) -> SceneEntry {
    object(Some(parent), id, Role::Group)
}

fn drawable(depth: i64) -> Drawable {
    Drawable {
        has_geometry: true,
        frustum_culled: true,
        in_frustum: true,
        material_visible: true,
        transparent: false,
        depth,
    }
}

fn mesh(parent: usize, id: u32, depth: i64) -> SceneEntry {
    object(Some(parent), id, Role::Drawable(drawable(depth)))
}

fn project(nodes: &[SceneEntry]) -> RenderList {
    let mut list = RenderList::new();
    project_object(nodes, &CAMERA, 0, &mut list, true);
    list.sort();
    list
}

fn ids(items: &[RenderItem]) -> Vec<u32> {
    items.iter().map(|item| item.id).collect()
}

#[test]
fn collects_meshes_nested_under_groups() {
    let nodes = [scene(), group(0, 1), group(1, 2), mesh(2, 3, 0), mesh(0, 4, 1)];
    let list = project(&nodes);
    assert_eq!(list.len(), 2, "a mesh two groups deep is still collected");
    assert!(list.transparent.is_empty());
}

#[test]
fn invisible_parent_hides_the_whole_subtree() {
    let mut hidden = group(0, 1);
    hidden.visible = false;
    let nodes = [scene(), hidden, mesh(1, 2, 0)];
    assert_eq!(project(&nodes).len(), 0);
}

#[test]
fn a_layers_miss_skips_the_object_but_not_its_children() {
    let mut outer = mesh(0, 1, 0);
    outer.layers = 1 << 1;
    let nodes = [scene(), outer, mesh(1, 2, 1)];
    let list = project(&nodes);
    assert_eq!(list.len(), 1, "only the child is drawn");
    assert_eq!(list.opaque[0].id, 2);
}

#[test]
fn frustum_culling_drops_an_object_behind_the_camera() {
    let mut behind = drawable(0);
    behind.in_frustum = false;
    let mut nodes = [scene(), object(Some(0), 1, Role::Drawable(behind))];
    assert_eq!(project(&nodes).len(), 0, "culled");

    behind.frustum_culled = false;
    nodes[1].role = Role::Drawable(behind);
    assert_eq!(project(&nodes).len(), 1, "frustumCulled = false keeps it");
}

#[test]
fn opaque_sorts_front_to_back_and_transparent_back_to_front() {
    // The far mesh is added first; the near one has the smaller depth.
    let nodes = [scene(), mesh(0, 1, 8), mesh(0, 2, 2)];
    let list = project(&nodes);
    assert_eq!(ids(&list.opaque), vec![2, 1], "painterSortStable: ascending z");

    let mut see_through = nodes;
    for entry in see_through.iter_mut().skip(1) {
        if let Role::Drawable(mut d) = entry.role {
            d.transparent = true;
            entry.role = Role::Drawable(d);
        }
    }
    let list = project(&see_through);
    assert!(list.opaque.is_empty());
    assert_eq!(ids(&list.transparent), vec![1, 2], "reversePainterSortStable: descending z");
}

#[test]
fn render_order_and_group_order_outrank_z() {
    let mut near = mesh(0, 1, 2);
    near.render_order = 1;
    let far = mesh(0, 2, 8);
    let list = project(&[scene(), near, far]);
    assert_eq!(ids(&list.opaque), vec![2, 1], "renderOrder beats z");

    // The near mesh moves under a group with render order -1.
    let mut lifted = group(0, 3);
    lifted.render_order = -1;
    let mut near = mesh(2, 1, 2);
    near.render_order = 1;
    let list = project(&[scene(), mesh(0, 2, 8), lifted, near]);
    assert_eq!(list.opaque[0].group_order, -1);
    assert_eq!(ids(&list.opaque), vec![1, 2], "groupOrder beats renderOrder");
}

#[test]
fn an_invisible_material_is_not_pushed() {
    let mut hidden = drawable(0);
    hidden.material_visible = false;
    let nodes = [scene(), object(Some(0), 1, Role::Drawable(hidden))];
    assert_eq!(project(&nodes).len(), 0);
}

#[test]
fn lights_are_collected_and_not_drawn_but_their_children_are() {
    let nodes = [scene(), object(Some(0), 1, Role::Light), mesh(1, 2, 0)];
    let list = project(&nodes);
    assert_eq!(list.lights.len(), 1, "the light is pushed as a light");
    assert_eq!(nodes[list.lights[0]].id, 1);
    assert_eq!(list.len(), 1, "and its bulb mesh is still drawn");
    assert_eq!(list.opaque[0].id, 2);
}

#[test]
fn unsorted_keeps_traversal_order() {
    let nodes = [scene(), mesh(0, 1, 8), mesh(0, 2, 2)];
    let mut list = RenderList::new();
    project_object(&nodes, &CAMERA, 0, &mut list, false);
    list.sort();
    assert_eq!(
        ids(&list.opaque),
        vec![1, 2],
        "with sortObjects off, z stays 0 and the id tie-break holds add order"
    );
    assert!(list.opaque.iter().all(|item| item.depth == 0));
}

#[test]
fn a_hidden_object_hides_its_lights_too() {
    let mut hidden = group(0, 1);
    hidden.visible = false;
    let nodes = [scene(), hidden, object(Some(1), 2, Role::Light), mesh(2, 3, 0)];
    let list = project(&nodes);
    assert!(list.lights.is_empty());
    assert!(list.is_empty());
}

#[test]
fn a_group_the_camera_does_not_see_passes_on_its_own_group_order() {
    let mut outer = group(0, 1);
    outer.render_order = 5;
    let mut inner = group(1, 2);
    inner.render_order = 9;
    inner.layers = 1 << 3;
    let nodes = [scene(), outer, inner, mesh(2, 3, 0)];
    let list = project(&nodes);
    assert_eq!(list.opaque[0].group_order, 5);

    let mut list = RenderList::new();
    project_object(&nodes[..1], &CAMERA, 7, &mut list, true);
    assert!(list.is_empty());
    let nodes = [scene(), mesh(0, 1, 0)];
    project_object(&nodes, &CAMERA, 7, &mut list, true);
    assert_eq!(list.opaque[0].group_order, 7);
}

#[test]
fn a_walk_appends_to_what_the_list_holds() {
    let nodes = [scene(), mesh(0, 1, 3)];
    let mut list = RenderList::new();
    project_object(&nodes, &CAMERA, 0, &mut list, true);
    project_object(&nodes, &CAMERA, 0, &mut list, true);
    assert_eq!(ids(&list.opaque), vec![1, 1]);
    assert_eq!(list.opaque[0].node, 1);
    assert_eq!(list.opaque[0].depth, 3);
}

#[test]
fn tied_draws_keep_the_order_they_were_walked_in() {
    let mut list = RenderList::new();
    let item = |node: usize| RenderItem { node, id: 4, group_order: 0, render_order: 0, depth: 0 };
    list.opaque = vec![item(3), item(1), item(2)];
    list.transparent = vec![item(9), item(5)];
    list.sort();
    let nodes: Vec<usize> = list.opaque.iter().map(|item| item.node).collect();
    assert_eq!(nodes, vec![3, 1, 2]);
    let nodes: Vec<usize> = list.items().iter().map(|item| item.node).collect();
    assert_eq!(nodes, vec![3, 1, 2, 9, 5]);
}

#[test]
fn the_painter_order_ranks_group_render_depth_then_id() {
    let item = |id: u32, group_order: i64, render_order: i64, depth: i64| RenderItem {
        node: id as usize,
        id,
        group_order,
        render_order,
        depth,
    };
    let mut list = RenderList::new();
    list.opaque = vec![item(1, 1, 0, 0), item(2, 0, 1, 0), item(3, 0, 0, 5), item(4, 0, 0, 2), item(5, 0, 0, 2)];
    list.transparent = list.opaque.clone();
    list.sort();
    assert_eq!(ids(&list.opaque), vec![4, 5, 3, 2, 1]);
    assert_eq!(ids(&list.transparent), vec![3, 4, 5, 2, 1]);
}

#[test]
fn a_shadow_pass_draws_only_the_casters() {
    let mut caster = mesh(0, 1, 0);
    caster.cast_shadow = true;
    let mut other_caster = mesh(0, 3, 0);
    other_caster.cast_shadow = true;
    let nodes = [scene(), caster, mesh(0, 2, 0), other_caster];
    let list = project(&nodes);
    let casters = three_rs::render_list::shadow_casters(&list.items(), &nodes);
    assert_eq!(ids(&casters), vec![1, 3]);
}

#[test]
fn lights_are_set_up_in_id_order() {
    let nodes = [
        scene(),
        object(Some(0), 7, Role::Light),
        object(Some(0), 3, Role::Light),
        object(Some(0), 5, Role::Light),
    ];
    let list = project(&nodes);
    assert_eq!(list.lights, vec![1, 2, 3]);
    let sorted: Vec<u32> = list.lights_by_id(&nodes).iter().map(|&l| nodes[l].id).collect();
    assert_eq!(sorted, vec![3, 5, 7]);
}
