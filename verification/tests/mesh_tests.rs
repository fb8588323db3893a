use powerusd::mesh::{plan_expansion, split_by_subsets, triangulate_faces, CornerSource, MeshLayout, UvSource};

#[test]
fn quad_fan() {
    assert_eq!(triangulate_faces(&[4], &[0, 1, 2, 3]), vec![0, 1, 2, 0, 2, 3]);
}

#[test]
fn mixed_faces() {
    assert_eq!(
        triangulate_faces(&[3, 4], &[0, 1, 2, 2, 1, 3, 4]),
        vec![0, 1, 2, 2, 1, 3, 2, 3, 4]
    );
    assert_eq!(triangulate_faces(&[2, 3], &[9, 9, 0, 1, 2]), vec![0, 1, 2]);
    assert_eq!(triangulate_faces(&[5], &[10, 11, 12, 13, 14]), vec![10, 11, 12, 10, 12, 13, 10, 13, 14]);
    assert!(triangulate_faces(&[], &[]).is_empty());
}

#[test]
fn per_vertex_attributes() {
    let counts = [4];
    let idx = [0, 1, 2, 3];
    let l = MeshLayout {
        positions_len: 12,
        normals_len: Some(12),
        normal_indices: None,
        uvs_len: Some(8),
        uv_indices: None,
        face_vertex_counts: &counts,
        face_vertex_indices: &idx,
    };
    let plan = plan_expansion(&l);
    let vs: Vec<usize> = plan.corners.iter().map(|c| c.vertex).collect();
    assert_eq!(vs, vec![0, 1, 2, 0, 2, 3]);
    assert_eq!(plan.corners[1], CornerSource { vertex: 1, normal: Some(1), uv: Some(UvSource::Index(1)) });
    assert_eq!(plan.triangle_faces, vec![0, 0]);
}

#[test]
fn face_varying_and_indexed_attributes() {
    let counts = [3];
    let idx = [2, 1, 0];
    let ni = [5, 0, 1];
    let l = MeshLayout {
        positions_len: 9,
        normals_len: Some(9),
        normal_indices: Some(&ni),
        uvs_len: Some(4),
        uv_indices: None,
        face_vertex_counts: &counts,
        face_vertex_indices: &idx,
    };
    let plan = plan_expansion(&l);
    // normal index 5 is out of range: falls back to min(fv, 3 - 1) = 0
    assert_eq!(plan.corners[0].normal, Some(0));
    assert_eq!(plan.corners[1].normal, Some(0));
    assert_eq!(plan.corners[2].normal, Some(1));
    // two UVs for three vertices, not face-varying: indexed by vertex; vertex 2 is out of range
    assert_eq!(plan.corners[0].uv, Some(UvSource::Zero));
    assert_eq!(plan.corners[1].uv, Some(UvSource::Index(1)));
    assert_eq!(plan.corners[2].uv, Some(UvSource::Index(0)));

    let l2 = MeshLayout { normals_len: None, uvs_len: None, normal_indices: None, ..l };
    let plan2 = plan_expansion(&l2);
    assert_eq!(plan2.corners[0], CornerSource { vertex: 2, normal: None, uv: None });
}

#[test]
fn face_varying_uvs_use_face_vertex() {
    let counts = [3];
    let idx = [0, 1, 2];
    let l = MeshLayout {
        positions_len: 12,
        normals_len: None,
        normal_indices: None,
        uvs_len: Some(6),
        uv_indices: None,
        face_vertex_counts: &counts,
        face_vertex_indices: &idx,
    };
    // 3 UVs, 4 vertices, 3 face-vertices: face-varying
    let plan = plan_expansion(&l);
    assert_eq!(plan.corners[2].uv, Some(UvSource::Index(2)));
}

#[test]
fn subsets_split_triangles() {
    let parts = split_by_subsets(&vec![0, 0, 1], &vec![vec![1], vec![0], vec![5]]);
    assert_eq!(parts, vec![(0, vec![6, 7, 8]), (1, vec![0, 1, 2, 3, 4, 5])]);
    assert!(split_by_subsets(&vec![0], &vec![]).is_empty());
}

use powerusd::mesh::{mesh_parts, MeshPart};

fn part(p: &MeshPart) -> (String, Option<Vec<usize>>, Option<Vec<u32>>, Option<String>) {
    (p.name.clone(), p.corners.clone(), p.indices.clone(), p.material.clone())
}

#[test]
fn mesh_records_without_points_or_faces() {
    let none: Vec<Vec<i32>> = vec![];
    let mats: Vec<Option<String>> = vec![];
    assert!(mesh_parts("/W/M", "M", false, None, &none, &mats, &None).is_empty());
    let r = mesh_parts("/W/M", "M", true, None, &none, &mats, &Some("/Mat".to_string()));
    assert_eq!(r.len(), 1);
    assert_eq!(r[0].path, "/W/M");
    assert_eq!(part(&r[0]), ("M".to_string(), None, None, Some("/Mat".to_string())));
}

#[test]
fn mesh_record_holds_every_corner() {
    let none: Vec<Vec<i32>> = vec![];
    let mats: Vec<Option<String>> = vec![];
    let tri = vec![0, 0];
    let r = mesh_parts("/M", "M", true, Some(&tri), &none, &mats, &None);
    assert_eq!(r.len(), 1);
    assert_eq!(part(&r[0]), ("M".to_string(), Some(vec![0, 1, 2, 3, 4, 5]), Some(vec![0, 1, 2, 3, 4, 5]), None));
}

#[test]
fn mesh_records_split_by_subset() {
    let tri = vec![0, 0, 1];
    let subsets = vec![vec![1], vec![7], vec![0]];
    let mats = vec![Some("/A".to_string()), Some("/B".to_string()), None];
    let r = mesh_parts("/M", "Mesh", true, Some(&tri), &subsets, &mats, &Some("/Own".to_string()));
    assert_eq!(r.len(), 2);
    assert_eq!(part(&r[0]), ("Mesh_0".to_string(), Some(vec![6, 7, 8]), Some(vec![0, 1, 2]), Some("/A".to_string())));
    assert_eq!(
        part(&r[1]),
        ("Mesh_2".to_string(), Some(vec![0, 1, 2, 3, 4, 5]), Some(vec![0, 1, 2, 3, 4, 5]), Some("/Own".to_string()))
    );
}
