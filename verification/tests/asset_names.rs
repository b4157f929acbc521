use ferrum::assets::{first_found, material_path, normal_map_path, resource_candidate_names, search_order, sky_format_for, triangle_incidence};
use ferrum::sky::SkyFormat;

#[test]
fn jpeg_extensions_are_interchangeable() {
    assert_eq!(
        resource_candidate_names("plant/leaf.jpg"),
        vec!["plant/leaf.jpg".to_string(), "plant/leaf.jpeg".to_string()]
    );
    assert_eq!(
        resource_candidate_names("floor/wood.jpeg"),
        vec!["floor/wood.jpeg".to_string(), "floor/wood.jpg".to_string()]
    );
    assert_eq!(resource_candidate_names("plant/plant.obj"), vec!["plant/plant.obj".to_string()]);
    assert_eq!(resource_candidate_names(".jpg"), vec![".jpg".to_string(), ".jpeg".to_string()]);
    assert_eq!(resource_candidate_names("jpg"), vec!["jpg".to_string()]);
    assert_eq!(resource_candidate_names("ñú.jpg"), vec!["ñú.jpg".to_string(), "ñú.jpeg".to_string()]);
}

#[test]
fn sky_format_by_extension() {
    assert_eq!(sky_format_for("exr/NightSkyHDRI014_16K_HDR.exr"), SkyFormat::Exr);
    assert_eq!(sky_format_for("sky/studio.hdr"), SkyFormat::Hdr);
    assert_eq!(sky_format_for("exr"), SkyFormat::Hdr);
    assert_eq!(sky_format_for(".exr"), SkyFormat::Exr);
}

#[test]
fn incidence_counts_triangle_corners() {
    // two triangles sharing the edge 1-2
    let indices: Vec<u32> = vec![0, 1, 2, 2, 1, 3];
    assert_eq!(triangle_incidence(&indices, 5), vec![1, 2, 2, 1, 0]);
    assert_eq!(triangle_incidence(&vec![], 3), vec![0, 0, 0]);
    // a degenerate triangle counts its repeated corner twice
    assert_eq!(triangle_incidence(&vec![0, 0, 1], 2), vec![2, 1]);
}

#[test]
fn every_name_is_tried_under_a_root_before_the_next_root() {
    assert_eq!(
        search_order(3, 2),
        vec![(0, 0), (0, 1), (1, 0), (1, 1), (2, 0), (2, 1)]
    );
    assert_eq!(search_order(2, 1), vec![(0, 0), (1, 0)]);
    assert!(search_order(0, 2).is_empty());
    assert!(search_order(3, 0).is_empty());
}

#[test]
fn the_first_location_found_wins() {
    assert_eq!(first_found(&vec![false, true, true]), Some(1));
    assert_eq!(first_found(&vec![true]), Some(0));
    assert_eq!(first_found(&vec![false, false]), None);
    assert_eq!(first_found(&vec![]), None);
}

#[test]
fn material_files_are_resolved_against_the_obj_directory() {
    assert_eq!(material_path("plant", "leaf.jpg"), "plant/leaf.jpg");
    assert_eq!(material_path("", "leaf.jpg"), "leaf.jpg");
    assert_eq!(material_path("res/", "leaf.jpg"), "res/leaf.jpg");
    assert_eq!(material_path("plant", "/abs/leaf.jpg"), "/abs/leaf.jpg");
    for (dir, name) in [("plant", "leaf.jpg"), ("a/b", "c/d.png"), ("res/", "x"), ("p", "/q"), ("p", "")] {
        let joined = std::path::Path::new(dir).join(name);
        assert_eq!(material_path(dir, name), joined.to_str().unwrap());
    }
}

#[test]
fn a_missing_normal_map_uses_the_default() {
    assert_eq!(normal_map_path("floor", ""), None);
    assert_eq!(normal_map_path("floor", "floor_n.png"), Some("floor/floor_n.png".to_string()));
}
