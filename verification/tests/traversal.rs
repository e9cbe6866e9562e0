use bevy::asset::AssetId;
use bevy::asset::Assets;
use bevy::pbr::StandardMaterial;
use bevy_line_boil::materials::BaseMaterials;
use bevy_line_boil::materials::ComposedMaterials;
use bevy_line_boil::materials::BaseMaterialId;
use bevy_line_boil::scene::Node;
use bevy_line_boil::scene::Scene;
use bevy_line_boil::settings::LineBoil;
use bevy_line_boil::traversal::apply_line_boil_to_marked_entities;
use bevy_line_boil::traversal::traverse_and_replace_materials;

fn id_of(id: AssetId<StandardMaterial>) -> BaseMaterialId {
    match id {
        AssetId::Index { index, .. } => BaseMaterialId::Index { bits: index.to_bits() },
        AssetId::Uuid { uuid } => BaseMaterialId::Uuid { uuid: uuid.as_u128() },
    }
}

fn store_with(roughness: &[f32]) -> (BaseMaterials, Vec<BaseMaterialId>) {
    let mut store = BaseMaterials { assets: Assets::default() };
    let mut ids = Vec::new();
    for value in roughness {
        let handle = store.assets.add(StandardMaterial {
            perceptual_roughness: *value,
            ..StandardMaterial::default()
        });
        ids.push(id_of(handle.id()));
    }
    (store, ids)
}

#[test]
fn every_mesh_beneath_a_marker_is_converted() {
    let (store, ids) = store_with(&[0.1, 0.2, 0.3]);
    let mut scene = Scene::new();
    let root = scene.spawn(Node::marked(LineBoil::aggressive()));
    let arm = scene.spawn_child(root, Node::mesh(ids[0])).unwrap();
    let hand = scene.spawn_child(arm, Node::mesh(ids[1])).unwrap();
    let leg = scene.spawn_child(root, Node::mesh(ids[2])).unwrap();
    let mut materials = ComposedMaterials::new();

    apply_line_boil_to_marked_entities(&mut scene, &store, &mut materials);

    assert_eq!(materials.len(), 3);
    for (entity, roughness) in [(arm, 0.1f32), (hand, 0.2), (leg, 0.3)] {
        let node = scene.node(entity).unwrap();
        assert!(node.applied);
        assert!(node.base_material.is_none());
        let material = materials.get(node.line_boil_material.unwrap()).unwrap();
        assert_eq!(material.base.perceptual_roughness, roughness);
        assert_eq!(material.extension.settings, LineBoil::aggressive().settings);
    }
    let top = scene.node(root).unwrap();
    assert!(!top.applied);
    assert!(top.line_boil_material.is_none());
    assert_eq!(top.marker, Some(LineBoil::aggressive()));
}

#[test]
fn a_marked_mesh_is_converted_itself() {
    let (store, ids) = store_with(&[0.4]);
    let mut scene = Scene::new();
    let mut node = Node::mesh(ids[0]);
    node.marker = Some(LineBoil::subtle());
    let root = scene.spawn(node);
    let mut materials = ComposedMaterials::new();

    apply_line_boil_to_marked_entities(&mut scene, &store, &mut materials);

    let after = scene.node(root).unwrap();
    assert!(after.applied);
    assert!(after.base_material.is_none());
    assert_eq!(after.line_boil_material, Some(0));
    assert_eq!(after.marker, Some(LineBoil::subtle()));
    assert_eq!(materials.get(0).unwrap().extension.settings, LineBoil::subtle().settings);
}

#[test]
fn handles_follow_the_depth_first_order() {
    let (store, ids) = store_with(&[0.0, 0.1, 0.2, 0.3, 0.4]);
    let mut scene = Scene::new();
    let mut top = Node::mesh(ids[0]);
    top.marker = Some(LineBoil::new());
    let root = scene.spawn(top);
    let left = scene.spawn_child(root, Node::mesh(ids[1])).unwrap();
    let right = scene.spawn_child(root, Node::mesh(ids[2])).unwrap();
    let left_low = scene.spawn_child(left, Node::mesh(ids[3])).unwrap();
    let right_low = scene.spawn_child(right, Node::mesh(ids[4])).unwrap();
    let mut materials = ComposedMaterials::new();

    apply_line_boil_to_marked_entities(&mut scene, &store, &mut materials);

    assert_eq!(scene.node(root).unwrap().line_boil_material, Some(0));
    assert_eq!(scene.node(left).unwrap().line_boil_material, Some(1));
    assert_eq!(scene.node(left_low).unwrap().line_boil_material, Some(2));
    assert_eq!(scene.node(right).unwrap().line_boil_material, Some(3));
    assert_eq!(scene.node(right_low).unwrap().line_boil_material, Some(4));
    assert_eq!(materials.get(2).unwrap().base.perceptual_roughness, 0.3);
    assert_eq!(materials.get(3).unwrap().base.perceptual_roughness, 0.2);
}

#[test]
fn a_second_traversal_changes_nothing() {
    let (store, ids) = store_with(&[0.1, 0.2]);
    let mut scene = Scene::new();
    let root = scene.spawn(Node::marked(LineBoil::subtle()));
    let mesh = scene.spawn_child(root, Node::mesh(ids[0])).unwrap();
    let missing = scene.spawn_child(root, Node::mesh(BaseMaterialId::Index { bits: 77 })).unwrap();
    let deep = scene.spawn_child(mesh, Node::mesh(ids[1])).unwrap();
    let mut materials = ComposedMaterials::new();

    apply_line_boil_to_marked_entities(&mut scene, &store, &mut materials);
    let first: Vec<Node> = (0..scene.len()).map(|i| scene.node(i).unwrap()).collect();
    assert_eq!(materials.len(), 2);

    apply_line_boil_to_marked_entities(&mut scene, &store, &mut materials);
    assert_eq!(materials.len(), 2);
    for entity in [root, mesh, missing, deep] {
        let node = scene.node(entity).unwrap();
        assert_eq!(node.applied, first[entity].applied);
        assert_eq!(node.base_material, first[entity].base_material);
        assert_eq!(node.line_boil_material, first[entity].line_boil_material);
        assert_eq!(node.marker, first[entity].marker);
    }
    assert!(scene.node(mesh).unwrap().applied);
    assert!(!scene.node(missing).unwrap().applied);
}

#[test]
fn settings_reach_every_depth() {
    let (store, ids) = store_with(&[0.5]);
    let marker = LineBoil::new()
        .with_intensity(0.03f32.to_bits())
        .with_frame_rate(5.0f32.to_bits())
        .with_noise_frequency(9.0f32.to_bits())
        .with_seed(7.0f32.to_bits());
    let mut scene = Scene::new();
    let root = scene.spawn(Node::marked(marker));
    let mut parent = root;
    let mut chain = Vec::new();
    for _ in 0..40 {
        parent = scene.spawn_child(parent, Node::mesh(ids[0])).unwrap();
        chain.push(parent);
    }
    let mut materials = ComposedMaterials::new();

    apply_line_boil_to_marked_entities(&mut scene, &store, &mut materials);

    assert_eq!(materials.len(), 40);
    for entity in chain {
        let node = scene.node(entity).unwrap();
        let settings = materials.get(node.line_boil_material.unwrap()).unwrap().extension.settings;
        assert_eq!(f32::from_bits(settings.intensity), 0.03);
        assert_eq!(f32::from_bits(settings.frame_rate), 5.0);
        assert_eq!(f32::from_bits(settings.noise_frequency), 9.0);
        assert_eq!(f32::from_bits(settings.seed), 7.0);
    }
}

#[test]
fn an_unresolved_material_is_converted_once_it_resolves() {
    let mut store = BaseMaterials { assets: Assets::default() };
    let pending = store.assets.reserve_handle();
    let id = id_of(pending.id());
    let mut scene = Scene::new();
    let root = scene.spawn(Node::marked(LineBoil::subtle()));
    let mesh = scene.spawn_child(root, Node::mesh(id)).unwrap();
    let mut materials = ComposedMaterials::new();

    apply_line_boil_to_marked_entities(&mut scene, &store, &mut materials);
    let waiting = scene.node(mesh).unwrap();
    assert!(!waiting.applied);
    assert_eq!(waiting.base_material, Some(id));
    assert!(waiting.line_boil_material.is_none());
    assert_eq!(materials.len(), 0);

    store
        .assets
        .insert(
            pending.id(),
            StandardMaterial { perceptual_roughness: 0.6, ..StandardMaterial::default() },
        )
        .unwrap();
    apply_line_boil_to_marked_entities(&mut scene, &store, &mut materials);
    let done = scene.node(mesh).unwrap();
    assert!(done.applied);
    assert!(done.base_material.is_none());
    assert_eq!(done.line_boil_material, Some(0));
    assert_eq!(materials.len(), 1);
    assert_eq!(materials.get(0).unwrap().base.perceptual_roughness, 0.6);
    assert_eq!(materials.get(0).unwrap().extension.settings, LineBoil::subtle().settings);
}

#[test]
fn a_mesh_beneath_no_marker_is_left_alone() {
    let (store, ids) = store_with(&[0.1, 0.2]);
    let mut scene = Scene::new();
    let plain = scene.spawn(Node::empty());
    let outside = scene.spawn_child(plain, Node::mesh(ids[0])).unwrap();
    let root = scene.spawn(Node::marked(LineBoil::subtle()));
    let inside = scene.spawn_child(root, Node::mesh(ids[1])).unwrap();
    let mut materials = ComposedMaterials::new();

    apply_line_boil_to_marked_entities(&mut scene, &store, &mut materials);

    let untouched = scene.node(outside).unwrap();
    assert!(!untouched.applied);
    assert_eq!(untouched.base_material, Some(ids[0]));
    assert!(untouched.line_boil_material.is_none());
    assert!(scene.node(inside).unwrap().applied);
    assert_eq!(materials.len(), 1);
}

#[test]
fn a_node_without_children_or_material_is_a_no_op() {
    let (store, _) = store_with(&[0.1]);
    let mut scene = Scene::new();
    let root = scene.spawn(Node::marked(LineBoil::subtle()));
    let mut materials = ComposedMaterials::new();

    apply_line_boil_to_marked_entities(&mut scene, &store, &mut materials);

    let node = scene.node(root).unwrap();
    assert!(!node.applied);
    assert!(node.base_material.is_none());
    assert!(node.line_boil_material.is_none());
    assert_eq!(node.marker, Some(LineBoil::subtle()));
    assert_eq!(materials.len(), 0);
    assert_eq!(scene.len(), 1);
}

#[test]
fn disjoint_roots_each_give_their_own_settings() {
    let (store, ids) = store_with(&[0.1, 0.2]);
    let mut scene = Scene::new();
    let calm = scene.spawn(Node::marked(LineBoil::subtle()));
    let wild = scene.spawn(Node::marked(LineBoil::aggressive()));
    let calm_mesh = scene.spawn_child(calm, Node::mesh(ids[0])).unwrap();
    let wild_mesh = scene.spawn_child(wild, Node::mesh(ids[1])).unwrap();
    let mut materials = ComposedMaterials::new();

    apply_line_boil_to_marked_entities(&mut scene, &store, &mut materials);

    let calm_handle = scene.node(calm_mesh).unwrap().line_boil_material.unwrap();
    let wild_handle = scene.node(wild_mesh).unwrap().line_boil_material.unwrap();
    assert_eq!(calm_handle, 0);
    assert_eq!(wild_handle, 1);
    let calm_material = materials.get(calm_handle).unwrap();
    let wild_material = materials.get(wild_handle).unwrap();
    assert_eq!(calm_material.extension.settings, LineBoil::subtle().settings);
    assert_eq!(calm_material.base.perceptual_roughness, 0.1);
    assert_eq!(wild_material.extension.settings, LineBoil::aggressive().settings);
    assert_eq!(wild_material.base.perceptual_roughness, 0.2);
}

#[test]
fn the_outermost_of_nested_markers_gives_the_settings() {
    let (store, ids) = store_with(&[0.1, 0.2]);
    let mut scene = Scene::new();
    let outer = scene.spawn(Node::marked(LineBoil::subtle()));
    let between = scene.spawn_child(outer, Node::mesh(ids[0])).unwrap();
    let inner = scene.spawn_child(between, Node::marked(LineBoil::aggressive())).unwrap();
    let deep = scene.spawn_child(inner, Node::mesh(ids[1])).unwrap();
    let mut materials = ComposedMaterials::new();

    apply_line_boil_to_marked_entities(&mut scene, &store, &mut materials);

    assert_eq!(materials.len(), 2);
    for entity in [between, deep] {
        let handle = scene.node(entity).unwrap().line_boil_material.unwrap();
        assert_eq!(materials.get(handle).unwrap().extension.settings, LineBoil::subtle().settings);
    }
}

#[test]
fn a_tagged_node_is_not_converted_again() {
    let (store, ids) = store_with(&[0.1, 0.2]);
    let mut scene = Scene::new();
    let root = scene.spawn(Node::marked(LineBoil::subtle()));
    let mesh = scene.spawn_child(root, Node::mesh(ids[0])).unwrap();
    let mut materials = ComposedMaterials::new();
    apply_line_boil_to_marked_entities(&mut scene, &store, &mut materials);

    let mut again = scene.node(mesh).unwrap();
    again.base_material = Some(ids[1]);
    assert!(scene.set_node(mesh, again));
    apply_line_boil_to_marked_entities(&mut scene, &store, &mut materials);

    let node = scene.node(mesh).unwrap();
    assert!(node.applied);
    assert_eq!(node.base_material, Some(ids[1]));
    assert_eq!(node.line_boil_material, Some(0));
    assert_eq!(materials.len(), 1);
    assert_eq!(materials.get(0).unwrap().base.perceptual_roughness, 0.1);
}

#[test]
fn converted_nodes_do_not_share_a_material() {
    let (store, ids) = store_with(&[0.1]);
    let mut scene = Scene::new();
    let root = scene.spawn(Node::marked(LineBoil::subtle()));
    let first = scene.spawn_child(root, Node::mesh(ids[0])).unwrap();
    let second = scene.spawn_child(root, Node::mesh(ids[0])).unwrap();
    let mut materials = ComposedMaterials::new();

    apply_line_boil_to_marked_entities(&mut scene, &store, &mut materials);

    let first_handle = scene.node(first).unwrap().line_boil_material.unwrap();
    let second_handle = scene.node(second).unwrap().line_boil_material.unwrap();
    assert_ne!(first_handle, second_handle);
    assert_eq!(materials.len(), 2);
    assert!(materials.set_time(first_handle, 1.0f32.to_bits()));
    assert_eq!(f32::from_bits(materials.get(first_handle).unwrap().extension.settings.time), 1.0);
    assert_eq!(f32::from_bits(materials.get(second_handle).unwrap().extension.settings.time), 0.0);
}

#[test]
fn a_mesh_spawned_after_the_marker_is_caught_by_the_next_traversal() {
    let (store, ids) = store_with(&[0.1, 0.2]);
    let mut scene = Scene::new();
    let root = scene.spawn(Node::marked(LineBoil::aggressive()));
    let early = scene.spawn_child(root, Node::mesh(ids[0])).unwrap();
    let mut materials = ComposedMaterials::new();
    apply_line_boil_to_marked_entities(&mut scene, &store, &mut materials);
    assert_eq!(materials.len(), 1);

    let late = scene.spawn_child(early, Node::mesh(ids[1])).unwrap();
    apply_line_boil_to_marked_entities(&mut scene, &store, &mut materials);

    assert_eq!(materials.len(), 2);
    assert_eq!(scene.node(early).unwrap().line_boil_material, Some(0));
    let node = scene.node(late).unwrap();
    assert!(node.applied);
    assert_eq!(node.line_boil_material, Some(1));
    assert_eq!(materials.get(1).unwrap().base.perceptual_roughness, 0.2);
    assert_eq!(materials.get(1).unwrap().extension.settings, LineBoil::aggressive().settings);
}

#[test]
fn traversal_of_one_subtree_uses_the_marker_it_is_given() {
    let (store, ids) = store_with(&[0.1, 0.2, 0.3]);
    let mut scene = Scene::new();
    let root = scene.spawn(Node::empty());
    let left = scene.spawn_child(root, Node::mesh(ids[0])).unwrap();
    let right = scene.spawn_child(root, Node::mesh(ids[1])).unwrap();
    let below = scene.spawn_child(left, Node::mesh(ids[2])).unwrap();
    let mut materials = ComposedMaterials::new();

    traverse_and_replace_materials(left, &LineBoil::aggressive(), &mut scene, &store, &mut materials);

    assert_eq!(materials.len(), 2);
    assert_eq!(scene.node(left).unwrap().line_boil_material, Some(0));
    assert_eq!(scene.node(below).unwrap().line_boil_material, Some(1));
    assert!(!scene.node(right).unwrap().applied);
    assert_eq!(scene.node(right).unwrap().base_material, Some(ids[1]));
    assert_eq!(materials.get(1).unwrap().extension.settings, LineBoil::aggressive().settings);
    assert_eq!(materials.get(1).unwrap().base.perceptual_roughness, 0.3);
}

#[test]
fn traversal_of_a_missing_entity_changes_nothing() {
    let (store, ids) = store_with(&[0.1]);
    let mut scene = Scene::new();
    let root = scene.spawn(Node::mesh(ids[0]));
    let mut materials = ComposedMaterials::new();

    traverse_and_replace_materials(5, &LineBoil::subtle(), &mut scene, &store, &mut materials);

    assert_eq!(materials.len(), 0);
    assert_eq!(scene.len(), 1);
    assert!(!scene.node(root).unwrap().applied);
    assert_eq!(scene.node(root).unwrap().base_material, Some(ids[0]));
}

#[test]
fn traversal_keeps_the_materials_that_exist() {
    let (store, ids) = store_with(&[0.1, 0.2]);
    let mut scene = Scene::new();
    let first = scene.spawn(Node::marked(LineBoil::subtle()));
    let first_mesh = scene.spawn_child(first, Node::mesh(ids[0])).unwrap();
    let mut materials = ComposedMaterials::new();
    apply_line_boil_to_marked_entities(&mut scene, &store, &mut materials);
    assert!(materials.set_time(0, 3.0f32.to_bits()));

    let second = scene.spawn(Node::marked(LineBoil::aggressive()));
    let second_mesh = scene.spawn_child(second, Node::mesh(ids[1])).unwrap();
    apply_line_boil_to_marked_entities(&mut scene, &store, &mut materials);

    assert_eq!(materials.len(), 2);
    assert_eq!(scene.node(first_mesh).unwrap().line_boil_material, Some(0));
    assert_eq!(scene.node(second_mesh).unwrap().line_boil_material, Some(1));
    let kept = materials.get(0).unwrap();
    assert_eq!(kept.base.perceptual_roughness, 0.1);
    assert_eq!(f32::from_bits(kept.extension.settings.time), 3.0);
    assert_eq!(f32::from_bits(kept.extension.settings.intensity), 0.008);
    assert_eq!(f32::from_bits(materials.get(1).unwrap().extension.settings.time), 0.0);
}

#[test]
fn a_large_forest_is_converted_exactly_beneath_its_markers() {
    let (store, ids) = store_with(&[0.5]);
    let mut scene = Scene::new();
    let mut parent_of: Vec<Option<usize>> = Vec::new();
    let mut marked: Vec<bool> = Vec::new();
    let mut seed: u32 = 12345;
    for entity in 0..200usize {
        seed = seed.wrapping_mul(1_103_515_245).wrapping_add(12_345);
        let is_root = entity == 0 || seed % 7 == 0;
        let is_marked = (seed >> 8) % 5 == 0;
        let mut node = Node::mesh(ids[0]);
        if is_marked {
            node.marker = Some(LineBoil::new().with_seed(entity as u32));
        }
        if is_root {
            assert_eq!(scene.spawn(node), entity);
            parent_of.push(None);
        } else {
            let parent = ((seed >> 16) as usize) % entity;
            assert_eq!(scene.spawn_child(parent, node), Some(entity));
            parent_of.push(Some(parent));
        }
        marked.push(is_marked);
    }
    let mut materials = ComposedMaterials::new();

    apply_line_boil_to_marked_entities(&mut scene, &store, &mut materials);

    let mut converted = 0;
    for entity in 0..200usize {
        let mut outermost = None;
        let mut at = Some(entity);
        while let Some(here) = at {
            if marked[here] {
                outermost = Some(here);
            }
            at = parent_of[here];
        }
        let node = scene.node(entity).unwrap();
        match outermost {
            Some(root) => {
                converted += 1;
                assert!(node.applied);
                assert!(node.base_material.is_none());
                let material = materials.get(node.line_boil_material.unwrap()).unwrap();
                assert_eq!(material.extension.settings.seed, root as u32);
            }
            None => {
                assert!(!node.applied);
                assert_eq!(node.base_material, Some(ids[0]));
                assert!(node.line_boil_material.is_none());
            }
        }
    }
    assert_eq!(materials.len(), converted);
    assert!(converted > 0 && converted < 200);
}
