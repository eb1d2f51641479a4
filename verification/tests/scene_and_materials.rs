use engine::buffers_pool::BufferReference;
use engine::id::{Id, NULL_ID_VALUE};
use engine::materials::{MaterialState, MaterialTextures, MaterialType, MaterialsPool};
use engine::model_loading::{
    embedded_texture_index, material_type_from_alpha_mode, mesh_object_placements, plan_mesh_instances,
    MeshInstancePlan,
    plan_texture_uploads,
};
use engine::scene_hierarchy::{flatten_scene_hierarchy, is_well_formed_tree, FlatNode};

fn node(source: usize, parent_index: Option<usize>) -> FlatNode {
    FlatNode { source, parent_index }
}

#[test]
fn flattening_puts_the_root_first_and_children_last_first() {
    let children: Vec<Vec<usize>> = vec![vec![1, 2], vec![3, 4], vec![5], vec![], vec![], vec![]];
    assert!(is_well_formed_tree(&children));
    let nodes = flatten_scene_hierarchy(&children);
    assert_eq!(
        nodes,
        vec![node(0, None), node(2, Some(0)), node(1, Some(0)), node(4, Some(2)), node(3, Some(2)), node(5, Some(1))]
    );
}

#[test]
fn flattening_keeps_every_parent_before_its_children() {
    let children: Vec<Vec<usize>> = vec![vec![1], vec![2, 3], vec![], vec![4], vec![]];
    let nodes = flatten_scene_hierarchy(&children);
    assert_eq!(nodes.len(), 5);
    for (i, n) in nodes.iter().enumerate().skip(1) {
        let parent = n.parent_index.unwrap();
        assert!(parent < i);
        assert!(children[nodes[parent].source].contains(&n.source));
    }
    for (i, n) in nodes.iter().enumerate() {
        for &child in children[n.source].iter() {
            assert!(nodes.contains(&node(child, Some(i))));
        }
    }
}

#[test]
fn no_node_of_a_tree_is_listed_twice() {
    let children: Vec<Vec<usize>> = vec![vec![1, 4], vec![2, 3], vec![], vec![5], vec![6], vec![], vec![]];
    let nodes = flatten_scene_hierarchy(&children);
    assert_eq!(nodes.len(), 7);
    for i in 0..nodes.len() {
        for j in (i + 1)..nodes.len() {
            assert_ne!(nodes[i].source, nodes[j].source);
        }
    }
}

#[test]
fn a_node_shared_by_two_parents_is_listed_under_each() {
    let children: Vec<Vec<usize>> = vec![vec![1, 2], vec![2], vec![]];
    let nodes = flatten_scene_hierarchy(&children);
    assert_eq!(nodes, vec![node(0, None), node(2, Some(0)), node(1, Some(0)), node(2, Some(2))]);
}

#[test]
fn a_lone_root_flattens_to_itself() {
    let children: Vec<Vec<usize>> = vec![vec![]];
    assert_eq!(flatten_scene_hierarchy(&children), vec![node(0, None)]);
}

#[test]
fn trees_with_backward_or_dangling_children_are_refused() {
    assert!(!is_well_formed_tree(&vec![vec![0]]));
    assert!(!is_well_formed_tree(&vec![vec![1], vec![0]]));
    assert!(!is_well_formed_tree(&vec![vec![2], vec![]]));
    assert!(is_well_formed_tree(&vec![vec![1], vec![]]));
}

#[test]
fn each_mesh_is_uploaded_by_its_first_node_only() {
    let node_meshes: Vec<Vec<usize>> = vec![vec![], vec![0, 1], vec![1], vec![0, 2]];
    let plans = plan_mesh_instances(&node_meshes, 3);
    let expected = vec![
        MeshInstancePlan { node_index: 1, mesh_index: 0, uploads_mesh: true },
        MeshInstancePlan { node_index: 1, mesh_index: 1, uploads_mesh: true },
        MeshInstancePlan { node_index: 2, mesh_index: 1, uploads_mesh: false },
        MeshInstancePlan { node_index: 3, mesh_index: 0, uploads_mesh: false },
        MeshInstancePlan { node_index: 3, mesh_index: 2, uploads_mesh: true },
    ];
    assert_eq!(plans, expected);
    assert_eq!(plans.iter().filter(|p| p.uploads_mesh).count(), 3);
}

#[test]
fn mesh_objects_are_laid_out_one_after_another() {
    let placements = mesh_object_placements(3, 48, 0x1000);
    assert_eq!(placements.len(), 3);
    assert_eq!(placements[0].region.src_offset, 0);
    assert_eq!(placements[1].region.src_offset, 48);
    assert_eq!(placements[2].region.dst_offset, 96);
    assert_eq!(placements[2].region.size, 48);
    assert_eq!(placements[0].device_address, 0x1000);
    assert_eq!(placements[2].device_address, 0x1000 + 96);
}

#[test]
fn blend_alpha_mode_makes_a_transparent_material() {
    assert_eq!(material_type_from_alpha_mode("BLEND"), MaterialType::Transparent);
    assert_eq!(material_type_from_alpha_mode("OPAQUE"), MaterialType::Opaque);
    assert_eq!(material_type_from_alpha_mode("MASK"), MaterialType::Opaque);
    assert_eq!(material_type_from_alpha_mode(""), MaterialType::Opaque);
}

#[test]
fn embedded_texture_paths_name_their_index() {
    assert_eq!(embedded_texture_index("*3"), Some(3));
    assert_eq!(embedded_texture_index("*0"), Some(0));
    assert_eq!(embedded_texture_index("*42"), Some(42));
    assert_eq!(embedded_texture_index("*+7"), Some(7));
}

#[test]
fn malformed_texture_paths_name_nothing() {
    assert_eq!(embedded_texture_index(""), None);
    assert_eq!(embedded_texture_index("*"), None);
    assert_eq!(embedded_texture_index("*+"), None);
    assert_eq!(embedded_texture_index("*-1"), None);
    assert_eq!(embedded_texture_index("*1a"), None);
    assert_eq!(embedded_texture_index("*99999999999999999999999999"), None);
}

#[test]
fn material_textures_keep_their_indices() {
    let t = MaterialTextures::new(1, 2, 3);
    assert_eq!(t.albedo_texture_index, 1);
    assert_eq!(t.metallic_texture_index, 2);
    assert_eq!(t.roughness_texture_index, 3);
}

#[test]
fn material_type_codes() {
    assert_eq!(MaterialType::Opaque.code(), 0);
    assert_eq!(MaterialType::Transparent.code(), 1);
    assert_eq!(MaterialType::default(), MaterialType::Opaque);
}

#[test]
fn materials_are_found_where_they_were_placed() {
    let mut pool = MaterialsPool::new();
    let opaque = MaterialState { material_type: MaterialType::Opaque };
    let transparent = MaterialState { material_type: MaterialType::Transparent };
    let a = pool.write_material(&[1, 2, 3, 4], opaque);
    let b = pool.write_material(&[5, 6], transparent);
    let c = pool.write_material(&[7, 8, 9], opaque);
    assert_eq!(a, Id::new(0));
    assert_eq!(b, Id::new(1));
    assert_eq!(c, Id::new(2));
    assert_eq!(pool.get_materials_data_to_write(), &[1, 2, 3, 4, 5, 6, 7, 8, 9]);
    assert_eq!(pool.get_materials_data_to_write_len(), 9);
    pool.set_materials_labels_device_addresses(0x2000);
    let info_b = pool.get_material_info_device_address_by_id(b);
    assert_eq!(info_b.material_type, MaterialType::Transparent);
    assert_eq!(info_b.device_adddress_materail_data, 0x2004);
    let info_c = pool.get_material_info_device_address_by_id(c);
    assert_eq!(info_c.material_type, MaterialType::Opaque);
    assert_eq!(info_c.device_adddress_materail_data, 0x2006);
    assert_eq!(pool.get_material_info_device_address_by_id(a).device_adddress_materail_data, 0x2000);
}

#[test]
fn resetting_materials_keeps_their_labels() {
    let mut pool = MaterialsPool::new();
    let state = MaterialState { material_type: MaterialType::Opaque };
    let a = pool.write_material(&[1, 2], state);
    pool.reset_materails_to_write();
    assert_eq!(pool.get_materials_data_to_write_len(), 0);
    pool.set_materials_labels_device_addresses(0x10);
    assert_eq!(pool.get_material_info_device_address_by_id(a).device_adddress_materail_data, 0x10);
    let reference = BufferReference { index: 3, generation: 1, ..BufferReference::default() };
    pool.set_materials_data_buffer_reference(reference);
    assert_eq!(pool.get_materials_data_buffer_reference(), reference);
}

#[test]
fn null_identifier() {
    assert!(Id::null().is_null());
    assert_eq!(Id::null().value, NULL_ID_VALUE);
    assert!(!Id::new(5).is_null());
}

#[test]
fn each_texture_is_uploaded_by_its_first_user_only() {
    let textures: Vec<Option<usize>> = vec![Some(2), None, Some(0), Some(2), None, Some(0), Some(1)];
    let uploads = plan_texture_uploads(&textures, 3);
    assert_eq!(uploads, vec![true, false, true, false, false, false, true]);
    assert_eq!(uploads.iter().filter(|u| **u).count(), 3);
}

#[test]
fn no_texture_no_upload() {
    assert_eq!(plan_texture_uploads(&vec![None, None], 0), vec![false, false]);
    assert_eq!(plan_texture_uploads(&vec![], 4), Vec::<bool>::new());
}
