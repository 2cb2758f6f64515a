use beatcraft_editor::dedupe::{DedupeMaps};
use beatcraft_editor::mesh::{
    NormalId, StateSet, Triangle, TriangleData, TriangleEntry, Triangles, UvId, Vertex, VertRefData, VertexId,
};
use beatcraft_editor::part::{
    ComputeNormal, ComputeVertex, DataSwap, Normals, Part, Vec2Bits, Vec3Bits, Vertices, UVs,
};
use beatcraft_editor::easing::Easing;
use indexmap::IndexMap;

fn corner(v: VertexId) -> Vertex {
    Vertex { vertex: v, uv: UvId::Index(0), normal: NormalId::Index(0) }
}

fn full_corner(v: usize, u: usize, n: usize) -> Vertex {
    Vertex { vertex: VertexId::Index(v), uv: UvId::Index(u), normal: NormalId::Index(n) }
}

fn tri(a: usize, b: usize, c: usize) -> Triangle {
    Triangle {
        vertices: [corner(VertexId::Index(a)), corner(VertexId::Index(b)), corner(VertexId::Index(c))],
        material: None,
    }
}

fn ids(t: &Triangle) -> [VertexId; 3] {
    [t.vertices[0].vertex.clone(), t.vertices[1].vertex.clone(), t.vertices[2].vertex.clone()]
}

fn v3(x: u32, y: u32, z: u32) -> Vec3Bits {
    Vec3Bits { x, y, z }
}

fn part_with(tris: Vec<Triangle>) -> Part {
    Part {
        vertices: Vertices { indexed: vec![v3(0, 0, 0), v3(1, 0, 0), v3(0, 1, 0), v3(1, 1, 0)], named: IndexMap::new(), compute: IndexMap::new() },
        uvs: UVs { indexed: vec![Vec2Bits { x: 0, y: 0 }], named: IndexMap::new() },
        normals: Normals { indexed: vec![v3(0, 0, 1)], named: IndexMap::new(), compute: IndexMap::new() },
        triangles: Triangles(tris),
    }
}

fn idx(i: usize) -> VertexId {
    VertexId::Index(i)
}

#[test]
fn vert_ref_resolves_with_defaults() {
    let d = (UvId::Index(7), NormalId::Named("up".to_string()));
    let v = VertRefData::Bare(idx(3)).resolve(&d);
    assert_eq!(v.vertex, idx(3));
    assert_eq!(v.uv, UvId::Index(7));
    assert_eq!(v.normal, NormalId::Named("up".to_string()));
    let v = VertRefData::WithUv(idx(1), UvId::Index(2)).resolve(&d);
    assert_eq!(v.uv, UvId::Index(2));
    assert_eq!(v.normal, NormalId::Named("up".to_string()));
    let v = VertRefData::Full(idx(1), UvId::Index(2), NormalId::Index(4)).resolve(&d);
    assert_eq!(v.normal, NormalId::Index(4));
}

#[test]
fn entries_decode_with_state_sets() {
    let entries = vec![
        TriangleEntry::Triangle(TriangleData {
            verts: [VertRefData::Bare(idx(0)), VertRefData::Bare(idx(1)), VertRefData::Bare(idx(2))],
            mat: None,
        }),
        TriangleEntry::StateSet(StateSet { uv: Some(UvId::Index(3)), normal: None }),
        TriangleEntry::Triangle(TriangleData {
            verts: [VertRefData::Bare(idx(1)), VertRefData::WithUv(idx(2), UvId::Index(9)), VertRefData::Bare(idx(3))],
            mat: Some("glass".to_string()),
        }),
    ];
    let tris = Triangles::from_entries(entries);
    assert_eq!(tris.0.len(), 2);
    assert_eq!(tris.0[0].vertices[0].uv, UvId::Index(0));
    assert_eq!(tris.0[1].vertices[0].uv, UvId::Index(3));
    assert_eq!(tris.0[1].vertices[1].uv, UvId::Index(9));
    assert_eq!(tris.0[1].vertices[2].normal, NormalId::Index(0));
    assert_eq!(tris.0[1].material.as_deref(), Some("glass"));
}

#[test]
fn entries_roundtrip_groups_by_state() {
    let tris = Triangles(vec![
        Triangle { vertices: [full_corner(0, 1, 1), full_corner(1, 1, 1), full_corner(2, 1, 1)], material: None },
        Triangle { vertices: [full_corner(0, 0, 0), full_corner(1, 0, 0), full_corner(2, 0, 0)], material: None },
        Triangle { vertices: [full_corner(1, 1, 1), full_corner(2, 1, 1), full_corner(3, 1, 1)], material: Some("m".into()) },
    ]);
    let entries = tris.into_entries();
    let back = Triangles::from_entries(entries);
    assert_eq!(back.0.len(), 3);
    // grouped: the two triangles with uv 1 / normal 1 come together first
    assert_eq!(back.0[0].vertices[0].uv, UvId::Index(1));
    assert_eq!(back.0[1].vertices[0].uv, UvId::Index(1));
    assert_eq!(ids(&back.0[1]), [idx(1), idx(2), idx(3)]);
    assert_eq!(back.0[1].material.as_deref(), Some("m"));
    assert_eq!(back.0[2].vertices[2].normal, NormalId::Index(0));
}

#[test]
fn contains_checks() {
    let mut p = part_with(vec![]);
    p.vertices.named.insert("top".to_string(), v3(5, 5, 5));
    p.vertices.compute.insert(
        "mid".to_string(),
        ComputeVertex { points: [idx(0), idx(1)], function: Easing::easeLinear, delta: Some(0), x: None, y: None, z: None },
    );
    assert!(p.contains_vertex(&idx(3)));
    assert!(!p.contains_vertex(&idx(4)));
    assert!(p.contains_vertex(&VertexId::Named("top".into())));
    assert!(p.contains_vertex(&VertexId::Named("mid".into())));
    assert!(!p.contains_vertex(&VertexId::Named("nope".into())));
    assert!(p.contains_uv(&UvId::Index(0)));
    assert!(!p.contains_uv(&UvId::Named("x".into())));
    assert!(p.contains_normal(&NormalId::Index(0)));
    assert!(!p.contains_normal(&NormalId::Index(1)));
}

#[test]
fn rename_material() {
    let mut t = tri(0, 1, 2);
    t.material = Some("old".into());
    let mut u = tri(1, 2, 3);
    u.material = Some("other".into());
    let mut p = part_with(vec![t, u, tri(0, 2, 3)]);
    p.rename_data(&DataSwap { from: "old".to_string(), to: "new".to_string() });
    assert_eq!(p.triangles.0[0].material.as_deref(), Some("new"));
    assert_eq!(p.triangles.0[1].material.as_deref(), Some("other"));
    assert_eq!(p.triangles.0[2].material, None);
}

#[test]
fn cascade_shifts_up_and_down() {
    let mut p = part_with(vec![tri(0, 1, 2), tri(1, 2, 3)]);
    p.cascade_ids(1, (1, 0, 0));
    assert_eq!(ids(&p.triangles.0[0]), [idx(1), idx(2), idx(2)]);
    assert_eq!(ids(&p.triangles.0[1]), [idx(2), idx(2), idx(3)]);
    let mut q = part_with(vec![tri(0, 2, 3)]);
    q.cascade_ids(1, (-1, 0, 0));
    assert_eq!(ids(&q.triangles.0[0]), [idx(0), idx(1), idx(2)]);
}

#[test]
fn cascade_moves_compute_points() {
    let mut p = part_with(vec![]);
    p.vertices.compute.insert(
        "c".to_string(),
        ComputeVertex { points: [idx(3), idx(0)], function: Easing::easeStep, delta: None, x: None, y: None, z: None },
    );
    p.normals.compute.insert("n".to_string(), ComputeNormal { points: [idx(0), idx(2), idx(3)] });
    p.cascade_ids(1, (-1, 0, 0));
    assert_eq!(p.vertices.compute["c"].points, [idx(2), idx(0)]);
    assert_eq!(p.normals.compute["n"].points, [idx(0), idx(1), idx(2)]);
}

#[test]
fn delete_triangles_within_vertices() {
    let mut p = part_with(vec![tri(0, 1, 2), tri(1, 2, 3), tri(0, 2, 3)]);
    p.delete_triangles_with_all_vertices(&[idx(0), idx(1), idx(2)]);
    assert_eq!(p.triangles.0.len(), 2);
    assert_eq!(ids(&p.triangles.0[0]), [idx(1), idx(2), idx(3)]);
    p.delete_triangles_with_all_vertices(&[idx(0), idx(1), idx(2)]);
    assert_eq!(p.triangles.0.len(), 2);
}

#[test]
fn flip_twice_restores() {
    let mut p = part_with(vec![tri(0, 1, 2), tri(1, 2, 3)]);
    p.flip_triangles(&[idx(0), idx(1), idx(2)]);
    assert_eq!(ids(&p.triangles.0[0]), [idx(2), idx(1), idx(0)]);
    assert_eq!(ids(&p.triangles.0[1]), [idx(1), idx(2), idx(3)]);
    p.flip_triangles(&[idx(0), idx(1), idx(2)]);
    assert_eq!(ids(&p.triangles.0[0]), [idx(0), idx(1), idx(2)]);
}

#[test]
fn filter_triangle_vertices_keeps_closed_corners_once() {
    let p = part_with(vec![tri(0, 1, 2), tri(1, 2, 3)]);
    let r = p.filter_triangle_vertices(&[idx(2), idx(0), idx(1), idx(1), idx(3)]);
    assert_eq!(r.len(), 4);
    for v in [idx(0), idx(1), idx(2), idx(3)] {
        assert!(r.contains(&v));
    }
    let r = p.filter_triangle_vertices(&[idx(0), idx(1)]);
    assert!(r.is_empty());
}

#[test]
fn toggle_adds_strip_then_deletes() {
    let mut p = part_with(vec![]);
    let vs = [idx(0), idx(1), idx(2), idx(3)];
    p.toggle_triangles(&vs, &[false, true]);
    assert_eq!(p.triangles.0.len(), 2);
    assert_eq!(ids(&p.triangles.0[0]), [idx(0), idx(1), idx(2)]);
    assert_eq!(ids(&p.triangles.0[1]), [idx(3), idx(2), idx(1)]);
    p.toggle_triangles(&vs, &[false, false]);
    assert!(p.triangles.0.is_empty());
    p.toggle_triangles(&vs[..2], &[]);
    assert!(p.triangles.0.is_empty());
}

#[test]
fn valid_ids_in_order() {
    let mut p = part_with(vec![]);
    p.vertices.named.insert("a".into(), v3(1, 2, 3));
    p.vertices.compute.insert(
        "b".into(),
        ComputeVertex { points: [idx(0), idx(1)], function: Easing::easeLinear, delta: None, x: None, y: None, z: None },
    );
    let v = p.get_valid_vertex_ids();
    assert_eq!(v, vec![idx(0), idx(1), idx(2), idx(3), VertexId::Named("a".into()), VertexId::Named("b".into())]);
    p.uvs.named.insert("u".into(), Vec2Bits { x: 1, y: 2 });
    assert_eq!(p.get_valid_uv_ids(), vec![UvId::Index(0), UvId::Named("u".into())]);
    assert_eq!(p.get_valid_normal_ids(), vec![NormalId::Index(0)]);
}

#[test]
fn resolve_uv_defaults_to_zero() {
    let mut p = part_with(vec![]);
    p.uvs.indexed.push(Vec2Bits { x: 7, y: 8 });
    p.uvs.named.insert("n".into(), Vec2Bits { x: 3, y: 4 });
    assert_eq!(p.resolve_uv(&UvId::Index(1)), Vec2Bits { x: 7, y: 8 });
    assert_eq!(p.resolve_uv(&UvId::Index(5)), Vec2Bits { x: 0, y: 0 });
    assert_eq!(p.resolve_uv(&UvId::Named("n".into())), Vec2Bits { x: 3, y: 4 });
    assert_eq!(p.resolve_uv(&UvId::Named("m".into())), Vec2Bits { x: 0, y: 0 });
}

#[test]
fn vertices_listing_and_selection() {
    let mut p = part_with(vec![]);
    p.vertices.named.insert("a".into(), v3(9, 9, 9));
    p.vertices.named.insert("b".into(), v3(8, 8, 8));
    let list = p.vertices.get_vec();
    assert_eq!(list.len(), 6);
    assert_eq!(list[4], (VertexId::Named("a".into()), v3(9, 9, 9)));
    let (stored, named) = p.filter_non_compute_vertices(&[VertexId::Named("b".into()), idx(2), idx(0), idx(7)]);
    assert_eq!(stored, vec![0, 2]);
    assert_eq!(named, vec![1]);
}

#[test]
fn dedupe_redirects_duplicates() {
    let mut p = part_with(vec![]);
    // stored: 0 and 2 share x and y (z is not compared), 1 differs
    p.vertices.indexed = vec![v3(1, 2, 3), v3(4, 5, 6), v3(1, 2, 9)];
    p.vertices.named.insert("a".into(), v3(7, 7, 7));
    p.vertices.named.insert("b".into(), v3(7, 7, 7));
    p.uvs.indexed = vec![Vec2Bits { x: 1, y: 1 }, Vec2Bits { x: 1, y: 1 }];
    p.triangles = Triangles(vec![
        Triangle {
            vertices: [
                Vertex { vertex: idx(2), uv: UvId::Index(1), normal: NormalId::Index(0) },
                Vertex { vertex: VertexId::Named("b".into()), uv: UvId::Index(0), normal: NormalId::Index(0) },
                Vertex { vertex: idx(1), uv: UvId::Index(0), normal: NormalId::Index(0) },
            ],
            material: Some("m".into()),
        },
    ]);
    let maps: DedupeMaps = p.dedupe_maps();
    assert_eq!(maps.vi, vec![None, None, Some(0)]);
    assert_eq!(maps.vn, vec![("b".to_string(), "a".to_string())]);
    assert_eq!(maps.ui, vec![None, Some(0)]);
    p.dedupe_data();
    let t = &p.triangles.0[0];
    assert_eq!(t.vertices[0].vertex, idx(0));
    assert_eq!(t.vertices[0].uv, UvId::Index(0));
    assert_eq!(t.vertices[1].vertex, VertexId::Named("a".into()));
    assert_eq!(t.vertices[2].vertex, idx(1));
    assert_eq!(t.material.as_deref(), Some("m"));
    assert_eq!(p.vertices.indexed.len(), 3);
}

#[test]
fn dedupe_computed_vertices() {
    let mut p = part_with(vec![]);
    let cv = ComputeVertex { points: [idx(0), idx(1)], function: Easing::easeLinear, delta: Some(5), x: None, y: None, z: None };
    let cv2 = ComputeVertex { points: [idx(0), idx(1)], function: Easing::easeLinear, delta: Some(5), x: None, y: None, z: None };
    let cv3 = ComputeVertex { points: [idx(0), idx(1)], function: Easing::easeStep, delta: Some(5), x: None, y: None, z: None };
    p.vertices.compute.insert("c1".into(), cv);
    p.vertices.compute.insert("c2".into(), cv2);
    p.vertices.compute.insert("c3".into(), cv3);
    p.normals.compute.insert("n1".into(), ComputeNormal { points: [idx(0), idx(1), idx(2)] });
    p.normals.compute.insert("n2".into(), ComputeNormal { points: [idx(0), idx(1), idx(2)] });
    let maps = p.dedupe_maps();
    assert_eq!(maps.vc, vec![("c2".to_string(), "c1".to_string())]);
    assert_eq!(maps.nc, vec![("n2".to_string(), "n1".to_string())]);
    let mut t = tri(0, 1, 2);
    t.vertices[0].vertex = VertexId::Named("c2".into());
    t.vertices[1].normal = NormalId::Named("n2".into());
    t.remap(&maps);
    assert_eq!(t.vertices[0].vertex, VertexId::Named("c1".into()));
    assert_eq!(t.vertices[1].normal, NormalId::Named("n1".into()));
}

#[test]
fn filter_triangles_selects_closed_ones() {
    let part = part_with(vec![tri(0, 1, 2), tri(1, 2, 3), tri(0, 2, 1), tri(3, 3, 3)]);
    assert_eq!(part.filter_triangles(&[idx(0), idx(1), idx(2)]), vec![0, 2]);
    assert_eq!(part.filter_triangles(&[idx(3)]), vec![3]);
    assert_eq!(part.filter_triangles(&[]), Vec::<usize>::new());
}

#[test]
fn toggle_deletes_when_any_triangle_is_within() {
    let mut p = part_with(vec![tri(0, 1, 2), tri(1, 3, 0)]);
    p.toggle_triangles(&[idx(0), idx(1), idx(2), idx(3)], &[false, false]);
    assert!(p.triangles.0.is_empty());
    let mut p = part_with(vec![tri(0, 1, 2), tri(0, 1, 3)]);
    p.toggle_triangles(&[idx(0), idx(1), idx(2)], &[false]);
    assert_eq!(p.triangles.0.len(), 1);
    assert_eq!(ids(&p.triangles.0[0]), [idx(0), idx(1), idx(3)]);
}

#[test]
fn stored_list_keeps_order_within_each_section() {
    let mut a = tri(0, 1, 2);
    a.vertices[0].uv = UvId::Index(1);
    a.vertices[1].uv = UvId::Index(1);
    a.vertices[2].uv = UvId::Index(1);
    let b = tri(1, 2, 3);
    let mut c = tri(2, 3, 0);
    c.vertices[0].uv = UvId::Index(1);
    c.vertices[1].uv = UvId::Index(1);
    c.vertices[2].uv = UvId::Index(1);
    let d = tri(3, 0, 1);
    let back = Triangles::from_entries(Triangles(vec![a, b, c, d]).into_entries());
    let order: Vec<[VertexId; 3]> = back.0.iter().map(ids).collect();
    assert_eq!(order, vec![[idx(0), idx(1), idx(2)], [idx(2), idx(3), idx(0)], [idx(1), idx(2), idx(3)], [idx(3), idx(0), idx(1)]]);
}
